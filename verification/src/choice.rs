use crate::config::{
    DESIRABILITY_HEURISTICS, DESIRABILITY_PHEROMONES, DIGGING_COST, MAX_PHEROMONES,
};
use crate::functions::Position;
use vstd::arithmetic::mul::{lemma_mul_inequality, lemma_mul_upper_bound};
use vstd::arithmetic::power::{lemma_pow_increases, lemma_pow_positive, pow};
use vstd::prelude::*;

verus! {

/// Number of values that a sample can take. A sample `s` stands for the
/// fraction `s / SAMPLE_RANGE`, which is at least 0 and less than 1.
pub const SAMPLE_RANGE: u128 = 0x1_0000_0000;

/// The desirability of a tunnel at the highest pheromone level.
pub const MAX_DESIRABILITY: u128 = 1_280_000_000_000_000_000_000_000_000;

/// A cell that an ant may move to, with the weight of that move.
#[derive(Clone, Copy)]
pub struct Choice {
    pub position: Position,
    pub desirability: u128,
}

impl View for Choice {
    type V = (Position, nat);

    open spec fn view(&self) -> (Position, nat) {
        (self.position, self.desirability as nat)
    }
}

/// The choices of a list, as pairs of a position and its weight.
pub open spec fn pairs(choices: Seq<Choice>) -> Seq<(Position, nat)> {
    choices.map_values(|c: Choice| c@)
}

/// How much a cell attracts by itself: a tunnel counts `DIGGING_COST` times
/// as much as a cell that is yet to be dug. Only the ratio between the two
/// bears on what an ant selects, so both are kept whole.
pub open spec fn heuristic(tunnel: bool) -> nat {
    if tunnel {
        DIGGING_COST as nat
    } else {
        1
    }
}

/// The weight of a move over a link with the given pheromone level, to a
/// cell that is a tunnel or not: the level and the heuristic, each raised to
/// its exponent.
pub open spec fn desirability(level: nat, tunnel: bool) -> nat {
    (pow(level as int, DESIRABILITY_PHEROMONES as nat) * pow(
        heuristic(tunnel) as int,
        DESIRABILITY_HEURISTICS as nat,
    )) as nat
}

/// The sum of the first `count` weights.
pub open spec fn weight_before(options: Seq<(Position, nat)>, count: int) -> nat
    decreases count,
{
    if count <= 0 {
        0
    } else {
        weight_before(options, count - 1) + options[count - 1].1
    }
}

/// The sum of all weights.
pub open spec fn total_weight(options: Seq<(Position, nat)>) -> nat {
    weight_before(options, options.len() as int)
}

/// Whether the options up to and including the one at `index` hold a share
/// of the total weight that is at least the fraction that `sample` stands
/// for.
pub open spec fn reaches(options: Seq<(Position, nat)>, sample: u32, index: int) -> bool {
    weight_before(options, index + 1) * SAMPLE_RANGE >= sample * total_weight(options)
}

/// The first index from `from` on at which the sample is reached.
pub open spec fn first_reaching(options: Seq<(Position, nat)>, sample: u32, from: int) -> Option<
    int,
>
    decreases options.len() - from,
{
    if from < 0 || from >= options.len() {
        None
    } else if reaches(options, sample, from) {
        Some(from)
    } else {
        first_reaching(options, sample, from + 1)
    }
}

/// The option that a sample selects: each option is selected with a chance
/// in proportion to its weight. Where all the weights are zero nothing is
/// selected.
pub open spec fn roulette(options: Seq<(Position, nat)>, sample: u32) -> Option<int> {
    if total_weight(options) == 0 {
        None
    } else {
        first_reaching(options, sample, 0)
    }
}

/// The position of the option that a sample selects.
pub open spec fn selected(options: Seq<(Position, nat)>, sample: u32) -> Option<Position> {
    match roulette(options, sample) {
        Some(index) => Some(options[index].0),
        None => None,
    }
}

/// The sum of some weights is no more than their number times a bound that
/// holds for each of them.
pub proof fn lemma_weight_before_bounded(options: Seq<(Position, nat)>, count: int, bound: nat)
    requires
        0 <= count <= options.len(),
        forall|i: int| 0 <= i < options.len() ==> (#[trigger] options[i]).1 <= bound,
    ensures
        weight_before(options, count) <= count * bound,
    decreases count,
{
    if count > 0 {
        lemma_weight_before_bounded(options, count - 1, bound);
        assert((count - 1) * bound + bound == count * bound) by (nonlinear_arith);
    }
}

/// The sums of the weights grow with the number of weights summed.
pub proof fn lemma_weight_before_grows(options: Seq<(Position, nat)>, fewer: int, more: int)
    requires
        fewer <= more,
    ensures
        weight_before(options, fewer) <= weight_before(options, more),
    decreases more - fewer,
{
    if fewer < more {
        lemma_weight_before_grows(options, fewer, more - 1);
    }
}

/// What `first_reaching` finds is an index from `from` on at which the
/// sample is reached, and no index between the two reaches it.
pub proof fn lemma_first_reaching(options: Seq<(Position, nat)>, sample: u32, from: int)
    requires
        0 <= from,
    ensures
        match first_reaching(options, sample, from) {
            Some(index) => {
                &&& from <= index < options.len()
                &&& reaches(options, sample, index)
                &&& forall|i: int| from <= i < index ==> !reaches(options, sample, i)
            },
            None => forall|i: int| from <= i < options.len() ==> !reaches(options, sample, i),
        },
    decreases options.len() - from,
{
    if from < options.len() && !reaches(options, sample, from) {
        lemma_first_reaching(options, sample, from + 1);
    }
}

/// Where some weight is positive, every sample selects an option.
pub proof fn lemma_roulette_selects(options: Seq<(Position, nat)>, sample: u32)
    requires
        total_weight(options) > 0,
    ensures
        roulette(options, sample) matches Some(index) && 0 <= index < options.len(),
{
    let total = total_weight(options);
    let last = options.len() - 1;
    assert(options.len() > 0);
    assert(sample * total <= SAMPLE_RANGE * total) by {
        lemma_mul_inequality(sample as int, SAMPLE_RANGE as int, total as int);
    }
    assert(total * SAMPLE_RANGE == SAMPLE_RANGE * total) by (nonlinear_arith);
    assert(reaches(options, sample, last));
    lemma_first_reaching(options, sample, 0);
}

/// A power grows with its base.
pub proof fn lemma_pow_grows_with_base(small: nat, large: nat, exponent: nat)
    requires
        small <= large,
    ensures
        0 <= pow(small as int, exponent) <= pow(large as int, exponent),
    decreases exponent,
{
    reveal(pow);
    if exponent > 0 {
        lemma_pow_grows_with_base(small, large, (exponent - 1) as nat);
        lemma_mul_upper_bound(
            small as int,
            large as int,
            pow(small as int, (exponent - 1) as nat),
            pow(large as int, (exponent - 1) as nat),
        );
        assert(0 <= small * pow(small as int, (exponent - 1) as nat)) by (nonlinear_arith)
            requires
                0 <= small,
                0 <= pow(small as int, (exponent - 1) as nat),
        ;
    }
}

/// The weight of a move is positive and no more than `MAX_DESIRABILITY`
/// where the pheromone level is positive and no more than the maximum.
pub proof fn lemma_desirability_bounds(level: nat, tunnel: bool)
    requires
        0 < level <= MAX_PHEROMONES,
    ensures
        0 < pow(level as int, DESIRABILITY_PHEROMONES as nat) <= 128_000_000_000_000_000_000_000,
        0 < pow(heuristic(tunnel) as int, DESIRABILITY_HEURISTICS as nat) <= 10_000,
        0 < desirability(level, tunnel) <= MAX_DESIRABILITY,
{
    let p = pow(level as int, DESIRABILITY_PHEROMONES as nat);
    let h = pow(heuristic(tunnel) as int, DESIRABILITY_HEURISTICS as nat);
    lemma_pow_positive(level as int, DESIRABILITY_PHEROMONES as nat);
    lemma_pow_positive(heuristic(tunnel) as int, DESIRABILITY_HEURISTICS as nat);
    lemma_pow_grows_with_base(level, MAX_PHEROMONES as nat, DESIRABILITY_PHEROMONES as nat);
    lemma_pow_grows_with_base(heuristic(tunnel), DIGGING_COST as nat, DESIRABILITY_HEURISTICS as nat);
    assert(pow(2000, 7) == 128_000_000_000_000_000_000_000) by {
        reveal_with_fuel(pow, 8);
    }
    assert(pow(100, 2) == 10_000) by {
        reveal_with_fuel(pow, 3);
    }
    assert(0 < p * h <= 128_000_000_000_000_000_000_000 * 10_000) by (nonlinear_arith)
        requires
            0 < p <= 128_000_000_000_000_000_000_000,
            0 < h <= 10_000,
    ;
}

/// Raises `base` to the power `exponent`, which must fit.
pub fn power_of(base: u128, exponent: u32) -> (power: u128)
    requires
        pow(base as int, exponent as nat) <= u128::MAX,
    ensures
        power == pow(base as int, exponent as nat),
{
    let mut power: u128 = 1;
    let mut done: u32 = 0;
    proof {
        reveal(pow);
    }
    while done < exponent
        invariant
            done <= exponent,
            power == pow(base as int, done as nat),
            pow(base as int, exponent as nat) <= u128::MAX,
        decreases exponent - done,
    {
        proof {
            reveal(pow);
            assert(pow(base as int, (done + 1) as nat) == base * pow(base as int, done as nat));
            if base > 0 {
                lemma_pow_increases(base as nat, (done + 1) as nat, exponent as nat);
            } else {
                assert(base * pow(base as int, done as nat) == 0) by (nonlinear_arith)
                    requires
                        base == 0,
                ;
            }
            assert(power * base == base * power) by (nonlinear_arith);
        }
        power = power * base;
        done += 1;
    }
    power
}

/// Selects one of the choices by a sample, each with a chance in proportion
/// to its weight. The weights must be small enough for their sum to be
/// compared with the sample.
pub fn spin(choices: &Vec<Choice>, sample: u32) -> (winner: Option<usize>)
    requires
        total_weight(pairs(choices@)) * SAMPLE_RANGE <= u128::MAX,
    ensures
        match winner {
            Some(index) => index < choices@.len() && roulette(pairs(choices@), sample) == Some(
                index as int,
            ),
            None => roulette(pairs(choices@), sample) is None,
        },
{
    let ghost options = pairs(choices@);
    let mut total: u128 = 0;
    let mut i: usize = 0;
    while i < choices.len()
        invariant
            i <= choices@.len(),
            options == pairs(choices@),
            total == weight_before(options, i as int),
            total_weight(options) * SAMPLE_RANGE <= u128::MAX,
        decreases choices@.len() - i,
    {
        proof {
            lemma_weight_before_grows(options, i + 1, options.len() as int);
        }
        total = total + choices[i].desirability;
        i += 1;
    }
    if total == 0 {
        return None;
    }
    proof {
        lemma_mul_inequality(sample as int, SAMPLE_RANGE as int, total as int);
        assert(total * SAMPLE_RANGE == SAMPLE_RANGE * total) by (nonlinear_arith);
        lemma_first_reaching(options, sample, 0);
    }
    let target: u128 = sample as u128 * total;
    let mut reached: u128 = 0;
    let mut i: usize = 0;
    while i < choices.len()
        invariant
            i <= choices@.len(),
            options == pairs(choices@),
            total == total_weight(options),
            total > 0,
            target == sample * total,
            reached == weight_before(options, i as int),
            total * SAMPLE_RANGE <= u128::MAX,
            first_reaching(options, sample, 0) == first_reaching(options, sample, i as int),
        decreases choices@.len() - i,
    {
        proof {
            lemma_weight_before_grows(options, i + 1, options.len() as int);
        }
        reached = reached + choices[i].desirability;
        assert(reached == weight_before(options, i + 1));
        if reached * SAMPLE_RANGE >= target {
            assert(reaches(options, sample, i as int));
            return Some(i);
        }
        i += 1;
    }
    None
}

} // verus!
