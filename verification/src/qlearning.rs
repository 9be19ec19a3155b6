//! The learning agent's table: how a situation becomes a row, how a set of
//! keys becomes a column, and which column the agent plays.

use crate::agent::{
    human_intent, input_of, AgentType, HumanIntent, HumanPlayerAgent, Intent,
};
use crate::game_engine::GameEngine;
use crate::player::PlayerSide;
use crate::random::random_range;
use vstd::prelude::*;

verus! {

/// The number of columns of the table: one for no key at all, and one for
/// each of the sixteen sets of keys the agent can hold.
pub const QVALUES_ACTIONS: usize = 17;

/// The number of rows of the table: one for each key that `hash` can give.
pub const QVALUES_STATES: u64 = 206910;

/// The keys held in a column: none in column 0; in columns 1 to 4 one arrow
/// (up, down, left, right); in columns 5 to 8 two (up and left, up and right,
/// down and left, down and right); in columns 9 to 16 the same eight with the
/// throw key. Every other number stands for no key.
pub open spec fn keys_of_index(index: int) -> u8 {
    if index == 1 {
        1
    } else if index == 2 {
        2
    } else if index == 3 {
        4
    } else if index == 4 {
        8
    } else if index == 5 {
        5
    } else if index == 6 {
        9
    } else if index == 7 {
        6
    } else if index == 8 {
        10
    } else if index == 9 {
        17
    } else if index == 10 {
        18
    } else if index == 11 {
        20
    } else if index == 12 {
        24
    } else if index == 13 {
        21
    } else if index == 14 {
        25
    } else if index == 15 {
        22
    } else if index == 16 {
        26
    } else {
        0
    }
}

/// The column of a set of keys: the one that holds exactly these keys, and
/// column 0 for a set that no column holds.
pub open spec fn index_of_keys(bits: u8) -> int {
    if bits == 1 {
        1
    } else if bits == 2 {
        2
    } else if bits == 4 {
        3
    } else if bits == 8 {
        4
    } else if bits == 5 {
        5
    } else if bits == 9 {
        6
    } else if bits == 6 {
        7
    } else if bits == 10 {
        8
    } else if bits == 17 {
        9
    } else if bits == 18 {
        10
    } else if bits == 20 {
        11
    } else if bits == 24 {
        12
    } else if bits == 21 {
        13
    } else if bits == 25 {
        14
    } else if bits == 22 {
        15
    } else if bits == 26 {
        16
    } else {
        0
    }
}

pub fn human_intent_to_index(intent: HumanIntent) -> (index: u8)
    ensures
        index == index_of_keys(intent.bits),
        index < QVALUES_ACTIONS,
{
    match intent.bits {
        1 => 1,
        2 => 2,
        4 => 3,
        8 => 4,
        5 => 5,
        9 => 6,
        6 => 7,
        10 => 8,
        17 => 9,
        18 => 10,
        20 => 11,
        24 => 12,
        21 => 13,
        25 => 14,
        22 => 15,
        26 => 16,
        _ => 0,
    }
}

pub fn human_intent_from_index(index: u8) -> (intent: HumanIntent)
    ensures
        intent.bits == keys_of_index(index as int),
{
    let bits: u8 = match index {
        1 => 1,
        2 => 2,
        3 => 4,
        4 => 8,
        5 => 5,
        6 => 9,
        7 => 6,
        8 => 10,
        9 => 17,
        10 => 18,
        11 => 20,
        12 => 24,
        13 => 21,
        14 => 25,
        15 => 22,
        16 => 26,
        _ => 0,
    };
    HumanIntent { bits }
}

/// Every column is the column of the keys it holds.
pub proof fn lemma_index_round_trip(index: int)
    requires
        0 <= index < QVALUES_ACTIONS,
    ensures
        index_of_keys(keys_of_index(index)) == index,
{
}

/// A set of keys that has a column other than 0 is the set that its column
/// holds.
pub proof fn lemma_keys_round_trip(bits: u8)
    requires
        index_of_keys(bits) != 0,
    ensures
        keys_of_index(index_of_keys(bits)) == bits,
{
}

/// What the court reads off for the key of a situation. Each reading is a
/// coordinate rounded to the nearest whole number, plus the magnitude of the
/// lower end of the feature's range, as an unsigned number; `heading` is the
/// class of the disc's direction of travel, from 0 (steeply up) to 4
/// (steeply down, or none).
#[derive(Clone, Copy, Debug, PartialEq, Eq, Structural)]
pub struct Sighting {
    pub own_x: u32,
    pub own_y: u32,
    pub disc_x: u32,
    pub disc_y: u32,
    pub heading: u32,
}

/// The six features of a situation, in the order in which the key packs
/// them.
#[derive(Clone, Copy, Debug, PartialEq, Eq, Structural)]
pub enum Feature {
    OwnX,
    OwnY,
    DiscX,
    DiscY,
    LastHeld,
    Heading,
}

/// The lowest whole number of a feature's range.
pub open spec fn lowest(feature: Feature) -> int {
    match feature {
        Feature::OwnX => -9,
        Feature::OwnY => -5,
        Feature::DiscX => -9,
        Feature::DiscY => -5,
        Feature::LastHeld => 0,
        Feature::Heading => 0,
    }
}

/// The highest whole number of a feature's range.
pub open spec fn highest(feature: Feature) -> int {
    match feature {
        Feature::OwnX => -1,
        Feature::OwnY => 5,
        Feature::DiscX => 9,
        Feature::DiscY => 5,
        Feature::LastHeld => 1,
        Feature::Heading => 4,
    }
}

/// The number of buckets of a feature.
pub open spec fn buckets(feature: Feature) -> int {
    highest(feature) - lowest(feature) + 1
}

/// The range of a feature, lowest and highest whole number.
pub fn feature_range(feature: Feature) -> (range: (i64, i64))
    ensures
        range.0 == lowest(feature),
        range.1 == highest(feature),
{
    match feature {
        Feature::OwnX => (-9, -1),
        Feature::OwnY => (-5, 5),
        Feature::DiscX => (-9, 9),
        Feature::DiscY => (-5, 5),
        Feature::LastHeld => (0, 1),
        Feature::Heading => (0, 4),
    }
}

/// Puts a reading into a bucket of the range from `min` to `max`, and says
/// how many buckets the range has. Readings beyond the range wrap around.
pub fn discretize(shifted: u32, min: i64, max: i64) -> (out: (u32, u32))
    requires
        min <= max,
        max - min < u32::MAX,
    ensures
        out.1 == max - min + 1,
        out.0 == shifted % out.1,
{
    let amplitude: u32 = (max - min + 1) as u32;
    (shifted % amplitude, amplitude)
}

/// Packs one more feature into a key: the reading's bucket, weighted by the
/// number of buckets of all the features packed before (`factor`), is added
/// to the key, and the weight grows by the feature's own number of buckets.
fn set_state(hash: &mut u64, shifted: u32, min: i64, max: i64, factor: &mut u32)
    requires
        min <= max,
        max - min < u32::MAX,
        *old(factor) * (max - min + 1) <= u32::MAX,
        *old(hash) + (max - min) * *old(factor) <= u64::MAX,
    ensures
        *final(hash) == *old(hash) + (shifted % ((max - min + 1) as u32)) * *old(factor),
        *final(factor) == *old(factor) * (max - min + 1),
{
    let (val, amplitude) = discretize(shifted, min, max);
    proof {
        let weight = *factor as int;
        assert(val * weight <= (max - min) * weight) by (nonlinear_arith)
            requires
                0 <= val <= max - min,
                0 <= weight,
        ;
        assert((max - min) * weight <= weight * (max - min + 1)) by (nonlinear_arith)
            requires
                0 <= weight,
                0 <= max - min,
        ;
    }
    *hash = *hash + (val * *factor) as u64;
    *factor = *factor * amplitude;
}

/// The bucket of the feature "who held the disc last": 1 for the left side,
/// 0 for the right side and for nobody.
pub open spec fn last_held_bucket(engine: GameEngine) -> int {
    match engine.frisbee.last_held {
        Some(PlayerSide::Left) => 1,
        _ => 0,
    }
}

/// The buckets of a situation, one for each feature in order.
pub open spec fn buckets_of(engine: GameEngine, sighting: Sighting) -> Seq<int> {
    seq![
        sighting.own_x as int % 9,
        sighting.own_y as int % 11,
        sighting.disc_x as int % 19,
        sighting.disc_y as int % 11,
        last_held_bucket(engine),
        sighting.heading as int % 5,
    ]
}

/// Whether six numbers are buckets: each within the number of buckets of its
/// feature.
pub open spec fn are_buckets(digits: Seq<int>) -> bool {
    &&& digits.len() == 6
    &&& 0 <= digits[0] < 9
    &&& 0 <= digits[1] < 11
    &&& 0 <= digits[2] < 19
    &&& 0 <= digits[3] < 11
    &&& 0 <= digits[4] < 2
    &&& 0 <= digits[5] < 5
}

/// The key of six buckets: the number they spell, first bucket lowest, where
/// the place of each bucket counts as many as its feature has buckets.
pub open spec fn key_of(digits: Seq<int>) -> int {
    digits[0] + 9 * (digits[1] + 11 * (digits[2] + 19 * (digits[3] + 11 * (digits[4] + 2
        * digits[5]))))
}

impl GameEngine {
    /// Records the keys of a column as the keys held on a side, so that the
    /// side plays them on this tick and the trainer can read them back.
    pub fn play_column(&mut self, side: PlayerSide, index: u8)
        ensures
            input_of(*final(self), side).bits == keys_of_index(index as int),
            input_of(*final(self), side.other()) == input_of(*old(self), side.other()),
            *final(self) == (GameEngine { inputs: final(self).inputs, ..*old(self) }),
    {
        let keys = human_intent_from_index(index);
        match side {
            PlayerSide::Left => {
                self.inputs.0 = keys;
            },
            PlayerSide::Right => {
                self.inputs.1 = keys;
            },
        }
    }

    /// The key under which the learning agents file a situation.
    pub fn hash(&self, sighting: &Sighting) -> (key: u64)
        ensures
            key == key_of(buckets_of(*self, *sighting)),
            key < QVALUES_STATES,
    {
        let mut val: u64 = 0;
        let mut factor: u32 = 1;
        let ghost d = buckets_of(*self, *sighting);

        set_state(&mut val, sighting.own_x, -9, -1, &mut factor);
        assert(factor == 9 && val == d[0]);
        set_state(&mut val, sighting.own_y, -5, 5, &mut factor);
        assert(factor == 99 && val == d[0] + 9 * d[1]);

        set_state(&mut val, sighting.disc_x, -9, 9, &mut factor);
        assert(factor == 1881 && val == d[0] + 9 * d[1] + 99 * d[2]);
        set_state(&mut val, sighting.disc_y, -5, 5, &mut factor);
        assert(factor == 20691 && val == d[0] + 9 * d[1] + 99 * d[2] + 1881 * d[3]);

        let last_held: u32 = match self.frisbee.last_held {
            Some(PlayerSide::Left) => 1,
            _ => 0,
        };
        assert(last_held == d[4] && last_held % 2 == last_held);
        set_state(&mut val, last_held, 0, 1, &mut factor);
        assert(factor == 41382 && val == d[0] + 9 * d[1] + 99 * d[2] + 1881 * d[3] + 20691 * d[4]);

        set_state(&mut val, sighting.heading, 0, 4, &mut factor);
        assert(val == d[0] + 9 * d[1] + 99 * d[2] + 1881 * d[3] + 20691 * d[4] + 41382 * d[5]);

        val
    }
}

/// Two situations with the same buckets have the same key, wherever in their
/// buckets the readings lie.
pub proof fn lemma_same_buckets_same_key(
    one: GameEngine,
    seen: Sighting,
    other: GameEngine,
    sighted: Sighting,
)
    requires
        buckets_of(one, seen) == buckets_of(other, sighted),
    ensures
        key_of(buckets_of(one, seen)) == key_of(buckets_of(other, sighted)),
{
}

/// Buckets that share a key are the same buckets.
pub proof fn lemma_key_tells_buckets(one: Seq<int>, other: Seq<int>)
    requires
        are_buckets(one),
        are_buckets(other),
        key_of(one) == key_of(other),
    ensures
        one == other,
{
    let a1 = one[1] + 11 * (one[2] + 19 * (one[3] + 11 * (one[4] + 2 * one[5])));
    let b1 = other[1] + 11 * (other[2] + 19 * (other[3] + 11 * (other[4] + 2 * other[5])));
    assert(one[0] == other[0] && a1 == b1);
    let a2 = one[2] + 19 * (one[3] + 11 * (one[4] + 2 * one[5]));
    let b2 = other[2] + 19 * (other[3] + 11 * (other[4] + 2 * other[5]));
    assert(one[1] == other[1] && a2 == b2);
    let a3 = one[3] + 11 * (one[4] + 2 * one[5]);
    let b3 = other[3] + 11 * (other[4] + 2 * other[5]);
    assert(one[2] == other[2] && a3 == b3);
    let a4 = one[4] + 2 * one[5];
    let b4 = other[4] + 2 * other[5];
    assert(one[3] == other[3] && a4 == b4);
    assert(one[4] == other[4] && one[5] == other[5]);
    assert(one =~= other);
}

/// Two situations that differ in the bucket of a feature have different
/// keys.
pub proof fn lemma_other_bucket_other_key(
    one: GameEngine,
    seen: Sighting,
    other: GameEngine,
    sighted: Sighting,
)
    requires
        buckets_of(one, seen) != buckets_of(other, sighted),
    ensures
        key_of(buckets_of(one, seen)) != key_of(buckets_of(other, sighted)),
{
    if key_of(buckets_of(one, seen)) == key_of(buckets_of(other, sighted)) {
        lemma_key_tells_buckets(buckets_of(one, seen), buckets_of(other, sighted));
    }
}

/// Whether `index` is the column the greedy agent plays: no value is
/// higher than the one there, and every value before it is lower.
pub open spec fn is_greedy(values: Seq<i64>, index: int) -> bool {
    &&& 0 <= index < values.len()
    &&& forall|j: int| 0 <= j < values.len() ==> (#[trigger] values[j]) <= values[index]
    &&& forall|j: int| 0 <= j < index ==> (#[trigger] values[j]) < values[index]
}

/// Finds the first column that holds the highest value of a row. The values
/// are whole numbers that order as the table's values do. A row without
/// columns has no such column.
pub fn greedy_action(values: &Vec<i64>) -> (index: Option<usize>)
    ensures
        index is None <==> values.len() == 0,
        index is Some ==> is_greedy(values@, index->0 as int),
{
    if values.len() == 0 {
        return None;
    }
    let mut best: usize = 0;
    let mut i: usize = 1;
    while i < values.len()
        invariant
            1 <= i <= values.len(),
            best < i,
            forall|j: int| 0 <= j < i ==> (#[trigger] values[j]) <= values[best as int],
            forall|j: int| 0 <= j < best ==> (#[trigger] values[j]) < values[best as int],
        decreases values.len() - i,
    {
        if values[i] > values[best] {
            best = i;
        }
        i = i + 1;
    }
    Some(best)
}

/// At most one column is the greedy one.
pub proof fn lemma_greedy_is_unique(values: Seq<i64>, one: int, other: int)
    requires
        is_greedy(values, one),
        is_greedy(values, other),
    ensures
        one == other,
{
    if one < other {
        assert(values[one] < values[other]);
        assert(values[other] <= values[one]);
    } else if other < one {
        assert(values[other] < values[one]);
        assert(values[one] <= values[other]);
    }
}

/// The column that the policy plays: the drawn one when it explores; else
/// the greedy one, and column 0 for a row without columns.
pub open spec fn played(explore: bool, drawn: int, values: Seq<i64>, index: int) -> bool {
    if explore {
        index == drawn
    } else if values.len() == 0 {
        index == 0
    } else {
        is_greedy(values, index)
    }
}

/// The agent that learns a table of values. It plays by the table; filling
/// the table is the trainer's work.
#[derive(Clone, Copy, Debug)]
pub struct TabularQLearningAgent {}

impl TabularQLearningAgent {
    pub fn get_type(&self) -> (agent: AgentType)
        ensures
            agent == AgentType::TabularQLearning,
    {
        AgentType::TabularQLearning
    }

    /// The column to play for a draw that the caller made. `explore` says
    /// whether this tick is one on which the agent tries something at random;
    /// `values` is the agent's row for the situation at hand.
    pub fn policy_with(&self, explore: bool, drawn: usize, values: &Vec<i64>) -> (index: usize)
        ensures
            played(explore, drawn as int, values@, index as int),
    {
        if explore {
            drawn
        } else {
            match greedy_action(values) {
                Some(index) => index,
                None => 0,
            }
        }
    }

    /// The column to play, drawn from all columns alike when the agent
    /// explores.
    pub fn policy(&self, explore: bool, values: &Vec<i64>) -> (index: usize)
        ensures
            exists|drawn: int|
                0 <= drawn < QVALUES_ACTIONS && #[trigger] played(
                    explore,
                    drawn,
                    values@,
                    index as int,
                ),
    {
        let drawn: usize = if explore {
            let d: i32 = random_range(0, 17);
            d as usize
        } else {
            0
        };
        let index = self.policy_with(explore, drawn, values);
        assert(played(explore, drawn as int, values@, index as int));
        index
    }

    /// The intent that the keys recorded for the side stand for: the agent
    /// plays as a human holding the keys of its column would.
    pub fn act(&mut self, side: PlayerSide, engine: &GameEngine) -> (intent: Intent)
        ensures
            intent == human_intent(input_of(*engine, side), side, engine.in_hands(side)),
    {
        let mut hands = HumanPlayerAgent {  };
        hands.act(side, engine)
    }
}

} // verus!
